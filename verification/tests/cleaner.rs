use sweep_core::cleaner::{entry_step, tree_tally, EntryStep, TreeEntry};
use sweep_core::cleaner::{
    clean, execute, plan, CleanPlan, ItemProbe, JobOutcome, PathProbe, StatOutcome,
};
use sweep_core::model::{
    CleanAction, CleanOptions, Disposition, Finding, IncludeLevel, PlannedItem, Safety,
};

fn finding(label: &str, path: &str, bytes: u64, safety: Safety) -> Finding {
    Finding {
        detector_id: "test".to_string(),
        label: label.to_string(),
        bytes,
        safety,
        detail: String::new(),
        action: CleanAction::RemovePath { path: path.to_string() },
    }
}

fn opts() -> CleanOptions {
    CleanOptions {
        execute: true,
        to_trash: false,
        include_level: IncludeLevel::All,
        force_danger: true,
    }
}

fn present(path: &str) -> PathProbe {
    PathProbe {
        canonical: Ok(path.to_string()),
        ancestors: Ok(()),
        stat: StatOutcome::Present { is_dir: true },
    }
}

fn ready() -> ItemProbe {
    ItemProbe { ancestors: Ok(()), still_valid: true, stat: StatOutcome::Present { is_dir: true } }
}

fn probes_for(findings: &[Finding]) -> Vec<PathProbe> {
    findings
        .iter()
        .map(|f| match &f.action {
            CleanAction::RemovePath { path } => present(path),
            _ => PathProbe { canonical: Err("no path".to_string()), ancestors: Ok(()), stat: StatOutcome::Missing },
        })
        .collect()
}

fn ready_for(findings: &[Finding]) -> Vec<ItemProbe> {
    findings.iter().map(|_| ready()).collect()
}

#[test]
fn guardrails_refuse_roots_empties_and_dotdot() {
    for root in ["/", "", "/tmp/../x"] {
        let findings = vec![finding("evil", root, 999, Safety::Safe)];
        let run = clean(&findings, &probes_for(&findings), &opts(), &ready_for(&findings));
        let r = run.receipt;
        assert!(r.removed.is_empty(), "must not plan {root}");
        assert!(run.jobs.is_empty(), "must not delete {root}");
        assert_eq!(r.skipped.len(), 1);
    }
}

#[test]
fn manual_and_command_findings_are_reported_never_run() {
    let findings = vec![
        Finding {
            detector_id: "docker".to_string(),
            label: "disk".to_string(),
            bytes: 100,
            safety: Safety::Caution,
            detail: String::new(),
            action: CleanAction::Manual { instructions: "do it".to_string() },
        },
        Finding {
            detector_id: "x".to_string(),
            label: "cmd".to_string(),
            bytes: 100,
            safety: Safety::Safe,
            detail: String::new(),
            action: CleanAction::RunCommand {
                program: "rm".to_string(),
                args: vec!["-rf".to_string(), "/".to_string()],
                description: "evil".to_string(),
            },
        },
    ];
    let run = clean(&findings, &probes_for(&findings), &opts(), &ready_for(&findings));
    let r = run.receipt;
    assert!(r.removed.is_empty());
    assert!(run.jobs.is_empty());
    assert_eq!(r.skipped.len(), 2);
    assert_eq!(r.skipped[0].reason, "manual steps required: do it");
    assert_eq!(r.skipped[1].reason, "needs external command (v1 reports only): evil");
}

#[test]
fn current_directory_is_never_a_clean_target() {
    let findings = vec![finding("fixture", ".", 1, Safety::Safe)];
    let p = plan(&findings, &[present("/work")], &CleanOptions::default());
    assert_eq!(p.total_bytes, 0);
    assert!(matches!(p.items[0].disposition, Disposition::Skipped { .. }));
}

#[test]
fn guardrail_reasons_name_the_refusal() {
    let cases = [
        ("", "refused: empty path"),
        ("/tmp/../x", "refused: `..` in path"),
        ("/", "refused: filesystem root"),
    ];
    for (path, reason) in cases {
        let findings = vec![finding("evil", path, 1, Safety::Safe)];
        let p = plan(&findings, &probes_for(&findings), &opts());
        match &p.items[0].disposition {
            Disposition::Skipped { reason: r } => assert_eq!(r, reason),
            other => panic!("planned {path}: {other:?}"),
        }
    }
}

#[test]
fn duplicates_and_parent_findings_do_not_inflate_preview() {
    let findings = vec![
        finding("fixture", "/t/cache", 32, Safety::Safe),
        finding("fixture", "/t/cache/sub", 32, Safety::Safe),
        finding("fixture", "/t/cache/sub", 32, Safety::Safe),
    ];
    let run = clean(&findings, &probes_for(&findings), &CleanOptions::default(), &ready_for(&findings));
    assert!(run.receipt.dry_run);
    assert_eq!(run.receipt.freed_bytes, 32);
    assert_eq!(run.receipt.removed.len(), 1);
    assert_eq!(run.receipt.removed[0].path, "/t/cache");
    assert!(run.jobs.is_empty());
}

#[test]
fn duplicate_path_is_planned_once() {
    let findings = vec![
        finding("a", "/t/dup", 5, Safety::Safe),
        finding("b", "/t//dup/", 5, Safety::Safe),
    ];
    let p = plan(&findings, &probes_for(&findings), &opts());
    assert_eq!(p.total_bytes, 5);
    match &p.items[1].disposition {
        Disposition::Skipped { reason } => assert_eq!(reason, "duplicate path"),
        other => panic!("{other:?}"),
    }
}

#[test]
fn skipped_caution_child_is_not_deleted_by_safe_parent() {
    let findings = vec![
        finding("fixture", "/t/cache", 32, Safety::Safe),
        finding("fixture", "/t/cache/dependencies", 32, Safety::Caution),
    ];
    let safe_only = CleanOptions { include_level: IncludeLevel::Safe, ..opts() };
    let run = clean(&findings, &probes_for(&findings), &safe_only, &ready_for(&findings));
    assert!(run.receipt.removed.is_empty());
    assert!(run.jobs.is_empty());
    assert_eq!(run.receipt.skipped[0].reason, "refused: contains an item excluded from this run");
    assert_eq!(run.receipt.skipped[1].reason, "filtered by --only level");
}

#[test]
fn execute_rejects_unknown_method_and_unapproved_danger() {
    for (via, safety) in [("typo", Safety::Safe), ("permanent", Safety::Danger)] {
        let plan = CleanPlan {
            items: vec![PlannedItem {
                finding: finding("fixture", "/t/keep", 16, safety),
                disposition: Disposition::Remove { via: via.to_string() },
            }],
            total_bytes: 16,
        };
        let permanent = CleanOptions { execute: true, to_trash: false, ..CleanOptions::default() };
        let run = execute(&plan, &permanent, &[ready()]);
        assert_eq!(run.receipt.errors.len(), 1);
        assert!(run.jobs.is_empty());
    }
}

#[test]
fn danger_needs_force_and_level_all() {
    let findings = vec![finding("db", "/t/db", 10, Safety::Danger)];
    let no_force = CleanOptions { include_level: IncludeLevel::All, force_danger: false, ..opts() };
    let run = clean(&findings, &probes_for(&findings), &no_force, &ready_for(&findings));
    assert!(run.jobs.is_empty());
    assert_eq!(run.receipt.skipped[0].reason, "danger items need --force");
    let safe_only = CleanOptions { include_level: IncludeLevel::Safe, force_danger: true, ..opts() };
    let run = clean(&findings, &probes_for(&findings), &safe_only, &ready_for(&findings));
    assert!(run.jobs.is_empty());
    assert_eq!(run.receipt.skipped[0].reason, "filtered by --only level");
    let run = clean(&findings, &probes_for(&findings), &opts(), &ready_for(&findings));
    assert_eq!(run.jobs.len(), 1);
    assert_eq!(run.jobs[0].path, "/t/db");
    assert_eq!(run.jobs[0].via, "permanent");
}

#[test]
fn caution_excluded_by_default_level() {
    let findings = vec![finding("mods", "/t/mods", 10, Safety::Caution)];
    let safe_only = CleanOptions { include_level: IncludeLevel::Safe, ..opts() };
    let run = clean(&findings, &probes_for(&findings), &safe_only, &ready_for(&findings));
    assert!(run.jobs.is_empty());
    assert_eq!(run.receipt.skipped.len(), 1);
}

#[test]
fn dry_run_touches_nothing_but_totals() {
    let findings = vec![finding("junk", "/t/junk", 50, Safety::Safe)];
    let dry = CleanOptions { execute: false, ..opts() };
    let run = clean(&findings, &probes_for(&findings), &dry, &ready_for(&findings));
    assert!(run.receipt.dry_run);
    assert_eq!(run.receipt.freed_bytes, 50);
    assert_eq!(run.receipt.removed[0].via, "permanent");
    assert!(run.jobs.is_empty(), "dry run must not delete");
}

#[test]
fn default_options_are_a_dry_run_to_trash_of_safe_items() {
    let o = CleanOptions::default();
    assert!(!o.execute);
    assert!(o.to_trash);
    assert_eq!(o.include_level, IncludeLevel::Safe);
    assert!(!o.force_danger);
    let findings = vec![finding("junk", "/t/junk", 7, Safety::Safe)];
    let run = clean(&findings, &probes_for(&findings), &o, &ready_for(&findings));
    assert_eq!(run.receipt.removed[0].via, "trash");
}

#[test]
fn symlinks_are_never_deleted_through() {
    let findings = vec![finding("link", "/t/link", 16, Safety::Safe)];
    let probes = vec![PathProbe {
        canonical: Ok("/t/victim".to_string()),
        ancestors: Ok(()),
        stat: StatOutcome::Link,
    }];
    let p = plan(&findings, &probes, &opts());
    match &p.items[0].disposition {
        Disposition::Skipped { reason } => assert_eq!(reason, "refused: path is a symbolic link"),
        other => panic!("{other:?}"),
    }
    // A path that became a link after planning is refused at execute time.
    let p = plan(&findings, &probes_for(&findings), &opts());
    let swapped = ItemProbe { ancestors: Ok(()), still_valid: true, stat: StatOutcome::Link };
    let run = execute(&p, &opts(), &[swapped]);
    assert!(run.jobs.is_empty());
    assert_eq!(
        run.receipt.errors[0],
        "link (/t/link): refused: became a symbolic link after planning"
    );
}

#[test]
fn missing_and_unreadable_paths_are_skipped() {
    let findings = vec![finding("a", "/t/a", 1, Safety::Safe), finding("b", "/t/b", 1, Safety::Safe)];
    let probes = vec![
        PathProbe { canonical: Err("gone".to_string()), ancestors: Ok(()), stat: StatOutcome::Missing },
        PathProbe {
            canonical: Err("denied".to_string()),
            ancestors: Ok(()),
            stat: StatOutcome::Failed { error: "denied".to_string() },
        },
    ];
    let p = plan(&findings, &probes, &opts());
    let reasons: Vec<String> = p
        .items
        .iter()
        .map(|i| match &i.disposition {
            Disposition::Skipped { reason } => reason.clone(),
            Disposition::Remove { .. } => "planned".to_string(),
        })
        .collect();
    assert_eq!(reasons, vec!["path already gone".to_string(), "cannot stat path: denied".to_string()]);
}

#[test]
fn vanished_item_does_not_stop_other_deletions() {
    let findings = vec![finding("gone", "/t/gone", 4, Safety::Safe), finding("kept", "/t/kept", 8, Safety::Safe)];
    let p = plan(&findings, &probes_for(&findings), &opts());
    let probes = vec![
        ItemProbe { ancestors: Ok(()), still_valid: true, stat: StatOutcome::Missing },
        ready(),
    ];
    let run = execute(&p, &opts(), &probes);
    assert_eq!(run.receipt.skipped.len(), 1);
    assert_eq!(run.receipt.skipped[0].reason, "vanished between plan and execute");
    assert_eq!(run.jobs.len(), 1);
    assert_eq!(run.jobs[0].path, "/t/kept");
}

#[test]
fn bytecode_sources_are_revalidated_before_execution() {
    let mut f = finding("__pycache__/ (pkg)", "/p/pkg/__pycache__", 8, Safety::Safe);
    f.detector_id = "pycache".to_string();
    let findings = vec![f];
    let p = plan(&findings, &probes_for(&findings), &opts());
    let stale = ItemProbe { ancestors: Ok(()), still_valid: false, stat: StatOutcome::Present { is_dir: true } };
    let run = execute(&p, &opts(), &[stale]);
    assert!(run.jobs.is_empty());
    assert_eq!(
        run.receipt.errors,
        vec!["/p/pkg/__pycache__: bytecode contents or sources changed after planning".to_string()]
    );
}

#[test]
fn ancestor_links_are_refused_at_plan_and_execute() {
    let findings = vec![finding("x", "/t/x", 1, Safety::Safe)];
    let probes = vec![PathProbe {
        canonical: Ok("/t/x".to_string()),
        ancestors: Err("refused: symbolic link or reparse point: /t".to_string()),
        stat: StatOutcome::Present { is_dir: true },
    }];
    let p = plan(&findings, &probes, &opts());
    assert_eq!(p.total_bytes, 0);
    let p = plan(&findings, &probes_for(&findings), &opts());
    let swapped = ItemProbe {
        ancestors: Err("refused: symbolic link or reparse point: /t".to_string()),
        still_valid: true,
        stat: StatOutcome::Present { is_dir: true },
    };
    let run = execute(&p, &opts(), &[swapped]);
    assert_eq!(run.receipt.errors, vec!["refused: symbolic link or reparse point: /t".to_string()]);
}

#[test]
fn finished_run_counts_bytes_actually_freed() {
    let findings = vec![finding("a", "/t/a", 7, Safety::Safe), finding("b", "/t/b", 9, Safety::Safe)];
    let p = plan(&findings, &probes_for(&findings), &opts());
    let run = execute(&p, &opts(), &ready_for(&findings));
    assert_eq!(run.jobs.len(), 2);
    let receipt = run.finish(&[
        JobOutcome { result: Ok(50), warnings: vec!["slow".to_string()] },
        JobOutcome { result: Err("locked".to_string()), warnings: vec![] },
    ]);
    assert!(!receipt.dry_run);
    assert_eq!(receipt.freed_bytes, 50);
    assert_eq!(receipt.removed.len(), 1);
    assert_eq!(receipt.removed[0].bytes, 50);
    assert_eq!(receipt.errors, vec!["slow".to_string(), "b (/t/b): locked".to_string()]);
}

#[test]
fn stricter_twin_keeps_the_stricter_level() {
    let findings = vec![finding("safe", "/t/same", 3, Safety::Safe), finding("caution", "/t/same", 3, Safety::Caution)];
    let p = plan(&findings, &probes_for(&findings), &opts());
    match &p.items[0].disposition {
        Disposition::Skipped { reason } => assert_eq!(reason, "same path has a stricter safety classification"),
        other => panic!("{other:?}"),
    }
    assert!(matches!(p.items[1].disposition, Disposition::Remove { .. }));
    assert_eq!(p.total_bytes, 3);
}

#[test]
fn run_removes_only_what_the_preview_listed() {
    let findings = vec![
        finding("a", "/t/a", 10, Safety::Safe),
        finding("b", "/t/b", 20, Safety::Caution),
        finding("c", "/t/a/c", 5, Safety::Safe),
    ];
    let run_opts = CleanOptions { include_level: IncludeLevel::Safe, ..opts() };
    let dry_opts = CleanOptions { execute: false, ..run_opts };
    let p = plan(&findings, &probes_for(&findings), &run_opts);
    let preview = execute(&p, &dry_opts, &ready_for(&findings)).receipt;
    let run = execute(&p, &run_opts, &ready_for(&findings));
    let listed: Vec<&str> = preview.removed.iter().map(|r| r.path.as_str()).collect();
    assert_eq!(listed, vec!["/t/a"]);
    assert_eq!(run.jobs.len(), 1);
    for job in &run.jobs {
        assert!(listed.contains(&job.path.as_str()));
    }
}

#[test]
fn parent_holding_an_excluded_twin_is_kept() {
    let findings = vec![
        finding("parent", "/x", 30, Safety::Safe),
        finding("child", "/x/c", 10, Safety::Safe),
        finding("child strict", "/x/c", 10, Safety::Caution),
    ];
    let safe_only = CleanOptions { include_level: IncludeLevel::Safe, ..opts() };
    let run = clean(&findings, &probes_for(&findings), &safe_only, &ready_for(&findings));
    assert!(run.jobs.is_empty());
    assert_eq!(run.receipt.skipped[0].reason, "refused: contains an item excluded from this run");
    assert_eq!(run.receipt.skipped[1].reason, "refused: covered by a broader finding");
    assert_eq!(run.receipt.skipped[2].reason, "filtered by --only level");
}

#[test]
fn tree_entries_never_follow_links() {
    assert_eq!(entry_step(TreeEntry::Link { is_dir: true }), EntryStep::RemoveLink { as_dir: true });
    assert_eq!(entry_step(TreeEntry::Link { is_dir: false }), EntryStep::RemoveLink { as_dir: false });
    assert_eq!(entry_step(TreeEntry::Dir), EntryStep::Descend);
    assert_eq!(entry_step(TreeEntry::File { len: 7 }), EntryStep::Unlink { len: 7 });
    assert_eq!(entry_step(TreeEntry::Other), EntryStep::RemoveOther);
}

#[test]
fn tree_tally_counts_only_removed_files() {
    let files = vec![Ok(10), Err("/t/locked: denied".to_string()), Ok(5)];
    let subs = vec![(100, vec!["/t/sub/x: busy".to_string()]), (1, Vec::new())];
    let (bytes, errors) = tree_tally(&files, &subs, vec!["/t: listing".to_string()], Some("cannot remove /t: not empty".to_string())).unwrap();
    assert_eq!(bytes, 116);
    assert_eq!(
        errors,
        vec!["/t: listing", "/t/locked: denied", "/t/sub/x: busy", "cannot remove /t: not empty"]
    );
    assert!(tree_tally(&[Ok(u64::MAX)], &[(1, Vec::new())], Vec::new(), None).is_none());
}

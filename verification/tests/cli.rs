use sweep_core::cleaner::tree_outcome;
use sweep_core::cli::{
    exit_code, findings_lines, findings_total, receipt_lines, refuses_unattended, safety_tag, scan_lines, RootArg,
};
use sweep_core::detectors::Ctx;
use sweep_core::model::{
    CleanAction, CleanOptions, CleanReceipt, DirEntry, Finding, RemovedItem, Safety, ScanOptions, ScanReport, SkippedItem,
};
use sweep_core::scanner::{ancestors_within, build_report, is_big_file, keeps_warning, DirTotal, WalkTotals};

fn receipt() -> CleanReceipt {
    CleanReceipt {
        schema_version: 1,
        dry_run: true,
        freed_bytes: 2048,
        removed: vec![RemovedItem { path: "/p/build".to_string(), bytes: 2048, via: "trash".to_string(), safety: Safety::Safe }],
        skipped: vec![SkippedItem {
            label: "disk".to_string(),
            safety: Safety::Caution,
            reason: "manual steps required: prune\r\nthen restart".to_string(),
        }],
        errors: vec![],
    }
}

#[test]
fn scan_human_output_shows_ranked_table() {
    let walk = WalkTotals {
        dirs: vec![
            DirTotal { path: "/t".to_string(), bytes: 2064, files: 2 },
            DirTotal { path: "/t/big".to_string(), bytes: 2048, files: 1 },
            DirTotal { path: "/t/small".to_string(), bytes: 16, files: 1 },
        ],
        big_files: vec![],
        worker_files: 2,
        warnings: vec![],
        suppressed: 0,
    };
    let opts = ScanOptions { top: 30, min_bytes: 0, min_file_bytes: 10 * 1024 * 1024, same_filesystem: false };
    let report = build_report("/t", walk, &opts, false);
    let lines = scan_lines(&report);
    let text = lines.join("\n");
    assert!(text.contains("2.0 KiB"));
    assert!(text.contains("big"));
    assert_eq!(lines[0], "/t  total 2.0 KiB in 2 files / 3 dirs");
    assert_eq!(lines[1], "-".repeat(64));
    assert_eq!(lines[3], "   2.0 KiB  [d]    /t/big");
    assert_eq!(lines.len(), 5);
}

#[test]
fn scan_output_lists_warnings_with_counts() {
    let report = ScanReport {
        schema_version: 1,
        root: "/r".to_string(),
        total_bytes: 0,
        total_files: 0,
        total_dirs: 0,
        warnings: (0..7).map(|i| format!("w{i}")).collect(),
        warnings_suppressed: 3,
        entries: vec![DirEntry { path: "/r/a/b/c/d/e/f/g/h/i/j".to_string(), bytes: 5, files: 1, depth: 10, is_dir: false }],
    };
    let lines = scan_lines(&report);
    assert_eq!(lines[2], format!("       5 B  [f]  {}/r/a/b/c/d/e/f/g/h/i/j", " ".repeat(16)));
    assert_eq!(lines[3], "\nWarnings (7 shown, 3 suppressed):");
    assert_eq!(lines.len(), 3 + 1 + 5);
    assert_eq!(lines[8], "  ! w4");
}

#[test]
fn findings_report_lists_each_finding() {
    let findings = vec![
        Finding {
            detector_id: "cargo".to_string(),
            label: "cargo registry/src".to_string(),
            bytes: 1536,
            safety: Safety::Safe,
            detail: "Extracted crate sources.\nsecond line".to_string(),
            action: CleanAction::RemovePath { path: "/h/.cargo/registry/src".to_string() },
        },
        Finding {
            detector_id: "docker".to_string(),
            label: "docker data disk (x.vhdx)".to_string(),
            bytes: 512,
            safety: Safety::Caution,
            detail: String::new(),
            action: CleanAction::Manual { instructions: "prune".to_string() },
        },
    ];
    assert_eq!(findings_total(&findings), 2048);
    let lines = findings_lines(&findings);
    assert_eq!(
        lines,
        vec![
            "Reclaimable: 2.0 KiB across 2 items\n".to_string(),
            "   1.5 KiB  [SAFE  ]  cargo registry/src".to_string(),
            "             /h/.cargo/registry/src".to_string(),
            "             Extracted crate sources. (cargo)".to_string(),
            "     512 B  [CAUTION]  docker data disk (x.vhdx)".to_string(),
            "              (docker)".to_string(),
            "\nRun `sweep clean` for a dry-run plan, `sweep clean --execute` to act.".to_string(),
        ]
    );
    assert_eq!(findings_lines(&vec![]), vec!["Nothing cleanable found. Your disk is already lean.".to_string()]);
}

#[test]
fn receipt_report_lists_removals_skips_and_errors() {
    let opts = CleanOptions::default();
    let lines = receipt_lines(&receipt(), &opts);
    assert_eq!(
        lines,
        vec![
            "DRY RUN — nothing deleted. Re-run with --execute to act (default destination: Recycle Bin).\n".to_string(),
            "Would free 2.0 KiB (1):".to_string(),
            "     2.0 KiB  [trash]  [SAFE  ]  /p/build".to_string(),
            "\nSkipped:".to_string(),
            "  - [CAUTION] disk: manual steps required: prune".to_string(),
        ]
    );
    let mut done = receipt();
    done.dry_run = false;
    done.removed.clear();
    done.skipped.clear();
    done.errors = vec!["x (/p/x): locked".to_string()];
    let lines = receipt_lines(&done, &opts);
    assert_eq!(lines, vec!["\nErrors:".to_string(), "  ! x (/p/x): locked".to_string()]);
    done.errors.clear();
    assert_eq!(receipt_lines(&done, &opts), vec!["Nothing to do.".to_string()]);
}

#[test]
fn exit_codes_and_tags() {
    assert_eq!(exit_code(&receipt()), 0);
    let mut failed = receipt();
    failed.errors.push("boom".to_string());
    assert_eq!(exit_code(&failed), 2);
    assert_eq!(safety_tag(Safety::Safe), "SAFE  ");
    assert_eq!(safety_tag(Safety::Caution), "CAUTION");
    assert_eq!(safety_tag(Safety::Danger), "DANGER");
}

#[test]
fn json_execute_requires_yes() {
    assert!(refuses_unattended(true, true, false));
    assert!(!refuses_unattended(true, true, true));
    assert!(!refuses_unattended(false, true, false));
    assert!(!refuses_unattended(true, false, false));
}

#[test]
fn bad_only_value_is_rejected_with_exit_1() {
    assert!(Safety::parse_level("everything").is_none());
    assert_eq!(Safety::parse_level("CAUTION"), Some(sweep_core::model::IncludeLevel::Caution));
}

#[test]
fn invalid_roots_dir_is_rejected() {
    let ctx = Ctx::for_tests("/h");
    let roots = vec![
        RootArg { path: "/ok".to_string(), is_dir: true },
        RootArg { path: "C:/definitely/not/here/sweep-xyz".to_string(), is_dir: false },
    ];
    assert_eq!(
        ctx.with_run_options(roots, false).err(),
        Some("--roots entry is not a directory: C:/definitely/not/here/sweep-xyz".to_string())
    );
    let ctx = Ctx::for_tests("/h");
    let ctx = ctx.with_run_options(vec![RootArg { path: "/ok".to_string(), is_dir: true }], true).unwrap();
    assert_eq!(ctx.project_roots, vec!["/ok".to_string()]);
    assert!(!ctx.docker_enabled);
    let ctx = Ctx::for_tests("/h").with_run_options(vec![], false).unwrap();
    assert_eq!(ctx.project_roots, vec!["/h/projects".to_string()]);
}

#[test]
fn file_bytes_count_toward_every_ancestor_up_to_the_root() {
    assert_eq!(
        ancestors_within("/r/a/b/f.bin", "/r"),
        vec!["/r/a/b".to_string(), "/r/a".to_string(), "/r".to_string()]
    );
    assert_eq!(ancestors_within("/r/f.bin", "/r"), vec!["/r".to_string()]);
    assert!(ancestors_within("/other/f.bin", "/r").is_empty());
    assert!(keeps_warning(24));
    assert!(!keeps_warning(25));
    let opts = ScanOptions::default();
    assert!(is_big_file(10 * 1024 * 1024, &opts));
    assert!(!is_big_file(10 * 1024 * 1024 - 1, &opts));
}

#[test]
fn tree_outcome_reports_survivors() {
    let done = tree_outcome(100, vec!["locked: a".to_string()], false);
    assert_eq!(done.result, Ok(100));
    assert_eq!(done.warnings, vec!["locked: a".to_string()]);
    let failed = tree_outcome(5, vec!["a".to_string(), "b".to_string()], true);
    assert_eq!(failed.result, Err("a; b".to_string()));
    assert!(failed.warnings.is_empty());
    let survived = tree_outcome(0, vec![], true);
    assert_eq!(survived.result, Err("tree still exists after deletion".to_string()));
}

#[test]
fn prompt_approves_only_y() {
    assert!(sweep_core::cli::approves("y\n"));
    assert!(sweep_core::cli::approves("  Y "));
    assert!(!sweep_core::cli::approves("yes"));
    assert!(!sweep_core::cli::approves(""));
    assert!(!sweep_core::cli::approves("n"));
}

#[test]
fn deletion_follows_only_a_preview_with_removals() {
    let preview = receipt();
    assert!(sweep_core::cli::acts_after_preview(true, &preview));
    assert!(!sweep_core::cli::acts_after_preview(false, &preview));
    let mut empty = receipt();
    empty.removed.clear();
    assert!(!sweep_core::cli::acts_after_preview(true, &empty));
}

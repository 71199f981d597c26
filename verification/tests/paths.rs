use sweep_core::cleaner::{clean, PathProbe, StatOutcome};
use sweep_core::cleaner::ItemProbe;
use sweep_core::detectors::winupdate::WindowsUpdateDetector;
use sweep_core::model::{CleanAction, CleanOptions, Finding, IncludeLevel, Safety};
use sweep_core::paths::{file_name, join, parent_path, refusal_reason, short_name, short_parent};
use sweep_core::scanner::ancestors_within;

fn finding(label: &str, path: &str, safety: Safety) -> Finding {
    Finding {
        detector_id: "test".to_string(),
        label: label.to_string(),
        bytes: 10,
        safety,
        detail: String::new(),
        action: CleanAction::RemovePath { path: path.to_string() },
    }
}

fn present(path: &str) -> PathProbe {
    PathProbe { canonical: Ok(path.to_string()), ancestors: Ok(()), stat: StatOutcome::Present { is_dir: true } }
}

fn ready() -> ItemProbe {
    ItemProbe { ancestors: Ok(()), still_valid: true, stat: StatOutcome::Present { is_dir: true } }
}

#[test]
fn windows_paths_join_with_backslashes() {
    assert_eq!(join("C:\\Users\\me", ".cargo"), "C:\\Users\\me\\.cargo");
    assert_eq!(join("C:\\Users\\me\\", ".cargo"), "C:\\Users\\me\\.cargo");
    assert_eq!(join("/home/me", ".cargo"), "/home/me/.cargo");
    assert_eq!(join("\\\\?\\C:\\work", "target"), "\\\\?\\C:\\work\\target");
}

#[test]
fn windows_prefixes_are_not_names() {
    assert_eq!(parent_path("C:\\Windows"), Some("C:\\".to_string()));
    assert_eq!(parent_path("\\\\?\\C:\\a"), Some("\\\\?\\C:\\".to_string()));
    assert_eq!(parent_path("\\\\server\\share\\x"), Some("\\\\server\\share\\".to_string()));
    assert_eq!(parent_path("C:\\"), None);
    assert_eq!(parent_path("/"), None);
    assert_eq!(parent_path("/a"), Some("/".to_string()));
    assert_eq!(file_name("C:\\"), None);
    assert_eq!(file_name("C:\\a\\b"), Some("b".to_string()));
    assert_eq!(short_name("\\\\?\\C:\\proj\\target"), "target");
    assert_eq!(short_parent("C:\\proj\\__pycache__"), "proj");
    assert_eq!(short_parent("C:\\__pycache__"), "?");
}

#[test]
fn windows_roots_are_refused() {
    for root in ["C:\\", "C:/", "\\\\?\\C:\\", "\\\\server\\share\\", "\\\\?\\UNC\\server\\share\\"] {
        assert_eq!(refusal_reason(root), Some("refused: filesystem root".to_string()), "{root}");
    }
    assert_eq!(refusal_reason("C:\\Users\\me\\.cargo"), None);
    assert_eq!(refusal_reason("\\\\?\\C:\\x"), None);
    assert_eq!(refusal_reason("C:\\a\\..\\b"), Some("refused: `..` in path".to_string()));
}

#[test]
fn windows_scan_counts_every_ancestor() {
    let dirs = ancestors_within("\\\\?\\C:\\r\\a\\f.txt", "\\\\?\\C:\\r");
    assert_eq!(dirs, vec!["\\\\?\\C:\\r\\a".to_string(), "\\\\?\\C:\\r".to_string()]);
    let drive = ancestors_within("C:\\f.txt", "C:\\");
    assert_eq!(drive, vec!["C:\\".to_string()]);
}

#[test]
fn windows_previous_install_sits_beside_the_windows_dir() {
    let targets = WindowsUpdateDetector.targets("C:\\Windows");
    assert_eq!(targets[0].path, "C:\\Windows\\SoftwareDistribution\\Download");
    assert_eq!(targets[1].path, "C:\\Windows.old");
}

#[test]
fn windows_parent_holding_an_excluded_child_is_kept() {
    let findings = vec![
        finding("cache", "\\\\?\\C:\\t\\cache", Safety::Safe),
        finding("deps", "\\\\?\\C:\\t\\cache\\dependencies", Safety::Caution),
    ];
    let probes: Vec<PathProbe> = ["\\\\?\\C:\\t\\cache", "\\\\?\\C:\\t\\cache\\dependencies"].iter().map(|p| present(p)).collect();
    let opts = CleanOptions { execute: true, to_trash: false, include_level: IncludeLevel::Safe, force_danger: false };
    let run = clean(&findings, &probes, &opts, &[ready(), ready()]);
    assert!(run.jobs.is_empty());
    assert_eq!(run.receipt.skipped[0].reason, "refused: contains an item excluded from this run");
}

#[test]
fn windows_covered_child_is_deleted_once() {
    let findings = vec![
        finding("cache", "C:\\t\\cache", Safety::Safe),
        finding("sub", "C:\\t\\cache\\sub", Safety::Safe),
    ];
    let probes: Vec<PathProbe> = ["C:\\t\\cache", "C:\\t\\cache\\sub"].iter().map(|p| present(p)).collect();
    let opts = CleanOptions { execute: true, to_trash: false, include_level: IncludeLevel::Safe, force_danger: false };
    let run = clean(&findings, &probes, &opts, &[ready(), ready()]);
    assert_eq!(run.jobs.len(), 1);
    assert_eq!(run.jobs[0].path, "C:\\t\\cache");
    assert_eq!(run.receipt.skipped[0].reason, "refused: covered by a broader finding");
}

use sweep_core::model::{ScanOptions, SCHEMA_VERSION};
use sweep_core::scanner::{
    build_report, display_path, format_bytes, scan_root, size_parts, size_unit_power, trim_warning, BigFile,
    DirTotal, ScanError, WalkTotals,
};

/// The size parser of the command line: the number is read as a double,
/// the unit is a power of 1024.
fn parse_size(s: &str) -> Result<u64, String> {
    let (num, unit) = size_parts(s)?;
    let trimmed = s.trim();
    let num: f64 = num.trim().parse().map_err(|_| format!("invalid size number: {trimmed}"))?;
    if !num.is_finite() || num < 0.0 {
        return Err(format!("invalid size (not a finite positive number): {trimmed}"));
    }
    let power = size_unit_power(&unit)?;
    let bytes = num * 1024f64.powi(power as i32);
    if !bytes.is_finite() || bytes >= u64::MAX as f64 {
        return Err(format!("size exceeds the supported range: {trimmed}"));
    }
    Ok(bytes as u64)
}

#[test]
fn parse_size_table() {
    assert_eq!(parse_size("512").unwrap(), 512);
    assert_eq!(parse_size("10KB").unwrap(), 10 * 1024);
    assert_eq!(parse_size("1.5 MB").unwrap(), 1_572_864);
    assert_eq!(parse_size("2gib").unwrap(), 2 * 1024 * 1024 * 1024);
    assert!(parse_size("10XB").is_err());
    assert!(parse_size("").is_err());
    assert!(parse_size("-5MB").is_err());
    assert!(parse_size("nan").is_err());
    assert!(parse_size("1e308GB").is_err(), "overflow must not saturate");
}

#[test]
fn sizes_reject_numeric_overflow() {
    for value in ["18446744073709551616", "999999999999999999999TB", "999999999999999999999999999999999999999999999999999999999999999999999999999999999999999999999999999999999999999999999999999999999999999999999999999999999999999999999999999999999999999999999999999999999999999999999999999999999999999999999999999999999999999999999999999999999999999999999999999999999999999999999TB"] {
        assert!(parse_size(value).is_err(), "accepted {value}");
    }
}

#[test]
fn size_parts_split_number_and_unit() {
    assert_eq!(size_parts("  1.5 MB ").unwrap(), ("1.5 ".to_string(), "MB".to_string()));
    assert_eq!(size_parts("512").unwrap(), ("512".to_string(), String::new()));
    assert_eq!(size_parts("   ").unwrap_err(), "empty size");
}

#[test]
fn size_units_are_powers_of_1024() {
    assert_eq!(size_unit_power(""), Ok(0));
    assert_eq!(size_unit_power(" b"), Ok(0));
    assert_eq!(size_unit_power("KiB"), Ok(1));
    assert_eq!(size_unit_power("mb"), Ok(2));
    assert_eq!(size_unit_power("G"), Ok(3));
    assert_eq!(size_unit_power("tB"), Ok(4));
    assert_eq!(size_unit_power(" XB "), Err("unknown size unit: xb".to_string()));
}

#[test]
fn trim_warning_never_splits_utf8() {
    let s = "é".repeat(500);
    let trimmed = trim_warning(&s);
    assert!(trimmed.len() <= 300 + "…".len());
    assert!(trimmed.ends_with('…'));
}

#[test]
fn trim_warning_keeps_short_text_and_cuts_at_300_bytes() {
    assert_eq!(trim_warning("permission denied"), "permission denied");
    let exact = "a".repeat(300);
    assert_eq!(trim_warning(&exact), exact);
    let long = "a".repeat(301);
    assert_eq!(trim_warning(&long), format!("{}…", "a".repeat(300)));
    let wide = format!("{}é", "a".repeat(299));
    assert_eq!(trim_warning(&wide), format!("{}…", "a".repeat(299)));
}

#[test]
fn format_bytes_table() {
    assert_eq!(format_bytes(0), "0 B");
    assert_eq!(format_bytes(512), "512 B");
    assert_eq!(format_bytes(1536), "1.5 KiB");
    assert_eq!(format_bytes(1024 * 1024 * 1024), "1.0 GiB");
}

#[test]
fn format_bytes_matches_one_decimal_float_formatting() {
    for bytes in [1023u64, 1024, 1280, 1331, 1536, 10_485_760, 1_099_511_627_776, 5_000_000_000_000_000, u64::MAX] {
        let mut value = bytes as f64;
        let mut unit = 0;
        let units = ["B", "KiB", "MiB", "GiB", "TiB"];
        while value >= 1024.0 && unit < 4 {
            value /= 1024.0;
            unit += 1;
        }
        let expected = if unit == 0 { format!("{} {}", bytes, units[0]) } else { format!("{value:.1} {}", units[unit]) };
        assert_eq!(format_bytes(bytes), expected, "bytes {bytes}");
    }
    assert_eq!(format_bytes(1023), "1023 B");
    assert_eq!(format_bytes(1024), "1.0 KiB");
}

#[test]
fn display_path_strips_verbatim_prefixes_on_windows() {
    assert_eq!(display_path(r"\\?\C:\Users", true), r"C:\Users");
    assert_eq!(display_path(r"\\?\UNC\server\share", true), r"\\server\share");
    assert_eq!(display_path(r"\\?\C:\Users", false), r"\\?\C:\Users");
    assert_eq!(display_path("/home/u", true), "/home/u");
}

#[test]
fn missing_root_is_an_error_not_a_panic() {
    let err = scan_root("/definitely/not/here/sweep-test", Err("No such file or directory".to_string()), false);
    match err {
        Err(e @ ScanError::RootUnreadable(..)) => assert_eq!(
            e.message(),
            "scan root is not accessible (/definitely/not/here/sweep-test): No such file or directory"
        ),
        _ => panic!("expected RootUnreadable"),
    }
    match scan_root("f.txt", Ok("/w/f.txt".to_string()), false) {
        Err(e @ ScanError::NotADirectory(_)) => assert_eq!(e.message(), "scan root is not a directory: f.txt"),
        _ => panic!("expected NotADirectory"),
    }
    assert!(matches!(scan_root("x", Ok("/w/x".to_string()), true), Ok(ref c) if c == "/w/x"));
}

fn fixture() -> WalkTotals {
    let dir = |p: &str, bytes: u64, files: u64| DirTotal { path: p.to_string(), bytes, files };
    WalkTotals {
        dirs: vec![
            dir("/r/b", 50, 1),
            dir("/r", 650, 4),
            dir("/r/a/deep", 300, 1),
            dir("/r/a", 400, 2),
        ],
        big_files: vec![
            BigFile { path: "/r/a/deep/f2.bin".to_string(), bytes: 300 },
            BigFile { path: "/r/top.bin".to_string(), bytes: 200 },
        ],
        worker_files: 4,
        warnings: vec![],
        suppressed: 0,
    }
}

#[test]
fn totals_and_ranking_are_exact() {
    let opts = ScanOptions { top: 10, min_bytes: 0, min_file_bytes: u64::MAX, same_filesystem: false };
    let mut walk = fixture();
    walk.big_files.clear();
    let report = build_report("/r", walk, &opts, false);
    assert_eq!(report.schema_version, SCHEMA_VERSION);
    assert_eq!(report.root, "/r");
    assert_eq!(report.total_bytes, 650);
    assert_eq!(report.total_files, 4);
    assert_eq!(report.total_dirs, 4);
    assert!(report.warnings.is_empty());
    let order: Vec<(&str, u64, usize)> = report.entries.iter().map(|e| (e.path.as_str(), e.bytes, e.depth)).collect();
    assert_eq!(order, vec![("/r", 650, 0), ("/r/a", 400, 1), ("/r/a/deep", 300, 2), ("/r/b", 50, 1)]);
    let a = report.entries.iter().find(|e| e.path.ends_with("/a")).unwrap();
    assert_eq!((a.bytes, a.files, a.depth), (400, 2, 1));
}

#[test]
fn min_bytes_filters_small_entries() {
    let opts = ScanOptions { top: 10, min_bytes: 100, min_file_bytes: u64::MAX, same_filesystem: false };
    let report = build_report("/r", fixture(), &opts, false);
    assert!(report.entries.iter().all(|e| e.bytes >= 100));
    assert!(!report.entries.iter().any(|e| e.path.ends_with("/b")));
}

#[test]
fn big_files_are_listed_individually() {
    let opts = ScanOptions { top: 10, min_bytes: 0, min_file_bytes: 150, same_filesystem: false };
    let report = build_report("/r", fixture(), &opts, false);
    let files: Vec<_> = report.entries.iter().filter(|e| !e.is_dir).collect();
    assert_eq!(files.len(), 2);
    assert!(files.iter().any(|e| e.path.ends_with("f2.bin") && e.bytes == 300 && e.files == 1 && e.depth == 3));
    // Equal sizes rank by path: the directory `/r/a/deep` before its file.
    let pos_dir = report.entries.iter().position(|e| e.path == "/r/a/deep").unwrap();
    let pos_file = report.entries.iter().position(|e| e.path == "/r/a/deep/f2.bin").unwrap();
    assert!(pos_dir < pos_file);
}

#[test]
fn ranking_is_cut_to_top() {
    let opts = ScanOptions { top: 2, min_bytes: 0, min_file_bytes: u64::MAX, same_filesystem: false };
    let report = build_report("/r", fixture(), &opts, false);
    assert_eq!(report.entries.len(), 2);
    assert_eq!(report.entries[0].path, "/r");
    assert_eq!(report.entries[1].path, "/r/a");
}

#[test]
fn count_mismatch_is_reported() {
    let opts = ScanOptions::default();
    let mut walk = fixture();
    walk.worker_files = 5;
    walk.warnings = vec!["permission denied".to_string()];
    walk.suppressed = 3;
    let report = build_report("/r", walk, &opts, false);
    assert_eq!(
        report.warnings,
        vec![
            "permission denied".to_string(),
            "internal count mismatch: workers saw 5 files, root aggregate has 4".to_string()
        ]
    );
    assert_eq!(report.warnings_suppressed, 3);
}

#[test]
fn path_order_is_component_wise() {
    // `/r/a/x` sorts before `/r/a-b` by components, though `-` < `/` as text.
    let opts = ScanOptions { top: 10, min_bytes: 0, min_file_bytes: u64::MAX, same_filesystem: false };
    let dir = |p: &str| DirTotal { path: p.to_string(), bytes: 10, files: 1 };
    let walk = WalkTotals {
        dirs: vec![dir("/r/a-b"), dir("/r/a/x")],
        big_files: vec![],
        worker_files: 0,
        warnings: vec![],
        suppressed: 0,
    };
    let report = build_report("/r", walk, &opts, false);
    let paths: Vec<&str> = report.entries.iter().map(|e| e.path.as_str()).collect();
    assert_eq!(paths, vec!["/r/a/x", "/r/a-b"]);
    assert_eq!(report.total_bytes, 0);
    let mut sorted = vec![std::path::PathBuf::from("/r/a-b"), std::path::PathBuf::from("/r/a/x")];
    sorted.sort();
    assert_eq!(sorted[0], std::path::PathBuf::from("/r/a/x"));
}

#[test]
fn walker_tallies_merge_directory_by_directory() {
    let mut a = sweep_core::scanner::DirTally::new();
    a.touch("/r".to_string());
    a.touch("/r/empty".to_string());
    assert!(a.add_file(&["/r/x".to_string(), "/r".to_string()], 10));
    let mut b = sweep_core::scanner::DirTally::new();
    assert!(b.add_file(&["/r/y".to_string(), "/r".to_string()], 5));
    assert!(b.add_file(&["/r/x".to_string(), "/r".to_string()], 1));
    let mut all = sweep_core::scanner::DirTally::new();
    assert!(all.absorb(&a));
    assert!(all.absorb(&b));
    let totals: Vec<(String, u64, u64)> = all.entries().into_iter().map(|d| (d.path, d.bytes, d.files)).collect();
    assert_eq!(
        totals,
        vec![
            ("/r".to_string(), 16, 3),
            ("/r/empty".to_string(), 0, 0),
            ("/r/x".to_string(), 11, 2),
            ("/r/y".to_string(), 5, 1),
        ]
    );
    let mut full = sweep_core::scanner::DirTally::new();
    assert!(full.add_file(&["/r".to_string()], u64::MAX));
    assert!(!full.add_file(&["/r".to_string()], 1));
}

#[test]
fn files_below_the_listing_size_are_not_listed() {
    let opts = ScanOptions { top: 10, min_bytes: 0, min_file_bytes: 250, same_filesystem: false };
    let report = build_report("/r", fixture(), &opts, false);
    let files: Vec<&str> = report.entries.iter().filter(|e| !e.is_dir).map(|e| e.path.as_str()).collect();
    assert_eq!(files, vec!["/r/a/deep/f2.bin"]);
}

use sweep_core::detectors::agent::AgentArtifactsDetector;
use sweep_core::detectors::android::AndroidDetector;
use sweep_core::detectors::angular::AngularDetector;
use sweep_core::detectors::browser::{is_profile, BrowserCacheDetector};
use sweep_core::detectors::cargo::CargoDetector;
use sweep_core::detectors::docker::{DockerDetector, FileMeta};
use sweep_core::detectors::dotnet::{is_manifest, DotNetDetector};
use sweep_core::detectors::gradle::{parse_dist_version, parse_simple_version, stale_caches, stale_dists, GradleDetector};
use sweep_core::detectors::nextjs::{depends_on_next, NextJsDetector};
use sweep_core::detectors::pycache::{backed_bytes, bytecode_source, is_bytecode, source_file, PycEntry, PyCacheDetector};
use sweep_core::detectors::pytest_caches::{classify, has_python_marker, DirItem, PyTestCachesDetector, PyTestItem};
use sweep_core::detectors::temp::{TempDetector, TempEntry};
use sweep_core::detectors::uv_cache::UvCacheDetector;
use sweep_core::detectors::vite::ViteDetector;
use sweep_core::detectors::freshness::{age_cutoff, entry_is_old, EntryAge, NANOS_PER_DAY};
use sweep_core::detectors::winupdate::{sized_bytes, WindowsUpdateDetector};
use sweep_core::detectors::{
    all_detectors, dir_finding, name_matches, package_has_dep, rank, retain_ids, scan_all, scan_selected,
    validate_ids, Candidate, Ctx, Detector, DetectorReport, DirProbe, EnvSnapshot, ProjectSet,
};
use sweep_core::model::{CleanAction, Finding, Safety};

fn names(list: &[&str]) -> Vec<String> {
    list.iter().map(|s| s.to_string()).collect()
}

fn sized(bytes: u64) -> DirProbe {
    DirProbe { is_dir: true, is_link: false, bytes }
}

fn found(id: &str, label: &str, bytes: u64) -> Finding {
    Finding {
        detector_id: id.to_string(),
        label: label.to_string(),
        bytes,
        safety: Safety::Safe,
        detail: String::new(),
        action: CleanAction::RemovePath { path: format!("/x/{label}") },
    }
}

#[test]
fn profile_allowlist() {
    assert!(is_profile("Default"));
    assert!(is_profile("Profile 1"));
    assert!(is_profile("Guest Profile"));
    assert!(!is_profile("System Profile"));
    assert!(!is_profile("GPUPersistentCache"));
    assert!(!is_profile("ShaderCache"));
}

#[test]
fn version_parsing() {
    assert_eq!(parse_dist_version("gradle-8.13-all"), Some((8, 13, 0)));
    assert_eq!(parse_dist_version("gradle-9.1.0-bin"), Some((9, 1, 0)));
    assert_eq!(parse_dist_version("custom-distro"), None);
    assert_eq!(parse_simple_version("9.3"), Some((9, 3, 0)));
    assert_eq!(parse_simple_version("nope"), None);
}

#[test]
fn version_parsing_edges() {
    assert_eq!(parse_simple_version("7"), Some((7, 0, 0)));
    assert_eq!(parse_simple_version("+7.1"), Some((7, 1, 0)));
    assert_eq!(parse_simple_version("1.2.3.4"), None);
    assert_eq!(parse_simple_version("1..3"), None);
    assert_eq!(parse_simple_version("18446744073709551616"), None);
    assert_eq!(parse_simple_version("18446744073709551615.0"), Some((u64::MAX, 0, 0)));
    assert_eq!(parse_dist_version("gradle-9.0-rc-1-bin"), None);
    assert_eq!(parse_dist_version("gradle-6.0-personal"), None);
    assert_eq!(parse_dist_version("gradle-5.0"), None);
    assert_eq!(parse_dist_version("gradle--bin"), None);
}

#[test]
fn gradle_preserves_unknown_distributions_and_both_newest_variants() {
    let dists = names(&[
        "gradle-7.0-bin",
        "gradle-8.0-all",
        "gradle-8.0-bin",
        "gradle-6.0-personal",
        "gradle-9.0-rc-1-bin",
        "gradle-5.0",
    ]);
    assert_eq!(stale_dists(&dists), names(&["gradle-7.0-bin"]));
}

#[test]
fn keeps_newest_dist_only() {
    let ctx = Ctx::for_tests("/home/u");
    let dists = names(&["gradle-8.11.1-all", "gradle-9.3.1-all", "custom-distro"]);
    let caches = names(&["8.11.1", "9.3.1", "modules-2", "jars-9"]);
    let c = GradleDetector.candidates(&ctx, &dists, &caches);
    let labels: Vec<&str> = c.iter().map(|c| c.label.as_str()).collect();
    assert_eq!(
        labels,
        vec!["gradle wrapper dist (gradle-8.11.1-all)", "gradle version cache (8.11.1)", "gradle dependency cache (modules-2)"]
    );
    assert_eq!(c[0].path, "/home/u/.gradle/wrapper/dists/gradle-8.11.1-all");
    assert_eq!(c[2].safety, Safety::Caution);
    assert_eq!(stale_caches(&names(&["8.0", "8.0.0"])), names(&["8.0"]));
}

#[test]
fn registry_lists_twenty_detectors_with_unique_ids() {
    let ds = all_detectors();
    assert_eq!(ds.len(), 20);
    assert_eq!(ds[0].id(), "cargo");
    assert_eq!(ds[19].id(), "windows-update");
    let mut ids: Vec<&str> = ds.iter().map(|d| d.id()).collect();
    ids.sort();
    ids.dedup();
    assert_eq!(ids.len(), 20);
    assert_eq!(CargoDetector.label(), "Cargo registry + build output");
}

#[test]
fn validate_and_retain_ids() {
    assert_eq!(validate_ids(&names(&["cargo", "docker"])), Ok(()));
    assert_eq!(validate_ids(&names(&["cargo", "nope", "zz"])), Err("unknown detector --id: nope".to_string()));
    let mut fs = vec![found("cargo", "a", 1), found("temp", "b", 2), found("cargo", "c", 3)];
    retain_ids(&mut fs, &names(&["cargo"]));
    let labels: Vec<&str> = fs.iter().map(|f| f.label.as_str()).collect();
    assert_eq!(labels, vec!["a", "c"]);
    retain_ids(&mut fs, &[]);
    assert_eq!(fs.len(), 2);
}

#[test]
fn findings_rank_largest_first_then_id_and_label() {
    let out = rank(vec![found("b", "x", 5), found("a", "y", 5), found("a", "b", 5), found("z", "q", 9)]);
    let keys: Vec<(&str, &str, u64)> = out.iter().map(|f| (f.detector_id.as_str(), f.label.as_str(), f.bytes)).collect();
    assert_eq!(keys, vec![("z", "q", 9), ("a", "b", 5), ("a", "y", 5), ("b", "x", 5)]);
}

#[test]
fn selection_honours_ids_and_docker_switch() {
    let mut ctx = Ctx::for_tests("/h");
    let reports = || {
        vec![
            DetectorReport { id: "cargo".to_string(), findings: vec![found("cargo", "t", 10)] },
            DetectorReport { id: "docker".to_string(), findings: vec![found("docker", "d", 99)] },
            DetectorReport { id: "temp".to_string(), findings: vec![found("temp", "s", 20)] },
        ]
    };
    let all = scan_all(&ctx, reports());
    assert_eq!(all.iter().map(|f| f.bytes).collect::<Vec<_>>(), vec![99, 20, 10]);
    ctx.docker_enabled = false;
    let all = scan_all(&ctx, reports());
    assert_eq!(all.iter().map(|f| f.bytes).collect::<Vec<_>>(), vec![20, 10]);
    let some = scan_selected(&ctx, &names(&["cargo"]), reports());
    assert_eq!(some.len(), 1);
    assert_eq!(some[0].detector_id, "cargo");
}

#[test]
fn name_rules_follow_the_platform() {
    assert!(name_matches("build", "Build", true));
    assert!(!name_matches("build", "Build", false));
    assert!(name_matches("build", "build", false));
}

#[test]
fn dir_finding_needs_a_real_non_empty_dir() {
    let c = || Candidate { label: "l".to_string(), path: "/p".to_string(), safety: Safety::Safe, detail: "d".to_string() };
    assert!(dir_finding("x", c(), &sized(0)).is_none());
    assert!(dir_finding("x", c(), &DirProbe { is_dir: false, is_link: false, bytes: 5 }).is_none());
    assert!(dir_finding("x", c(), &DirProbe { is_dir: true, is_link: true, bytes: 5 }).is_none());
    let f = dir_finding("x", c(), &sized(5)).unwrap();
    assert_eq!((f.detector_id.as_str(), f.bytes), ("x", 5));
    assert!(matches!(f.action, CleanAction::RemovePath { ref path } if path == "/p"));
}

#[test]
fn invalid_dependency_values_do_not_authorize_cache_cleanup() {
    for value in ["null", "false", "123", "{}", "\"\""] {
        let manifest = format!("{{\"dependencies\":{{\"vite\":{value},\"@angular/cli\":{value}}}}}");
        assert!(!package_has_dep(&manifest, "vite"), "{value}");
        assert!(ViteDetector.project_candidates("/p/app", Some(&manifest)).is_empty());
        assert!(AngularDetector.project_candidates("/p/app", Some(&manifest)).is_empty());
    }
    assert!(package_has_dep(r#"{"devDependencies":{"vite":"^5"}}"#, "vite"));
    assert!(!package_has_dep("not json", "vite"));
}

#[test]
fn angular_targets_only_its_cache_subdirectory() {
    let c = AngularDetector.project_candidates("/p/app", Some(r#"{"devDependencies":{"@angular/cli":"19"}}"#));
    assert_eq!(c.len(), 1);
    assert_eq!(c[0].path, "/p/app/.angular/cache");
    assert_eq!(c[0].label, ".angular/cache/ (app)");
}

#[test]
fn next_projects_flag_build_cache_and_modules() {
    assert!(depends_on_next(r#"{"dependencies":{"next":null}}"#));
    assert!(!depends_on_next(r#"{"dependencies":{"react":"18"}}"#));
    let c = NextJsDetector.project_candidates("/p/site", Some(r#"{"peerDependencies":{"next":"14"}}"#));
    assert_eq!(c.len(), 2);
    assert_eq!((c[0].label.as_str(), c[0].safety), (".next/ (site)", Safety::Safe));
    assert_eq!((c[1].label.as_str(), c[1].safety), ("node_modules/ (site)", Safety::Caution));
    assert!(NextJsDetector.project_candidates("/p/site", None).is_empty());
}

#[test]
fn dotted_module_names_require_the_exact_source() {
    assert_eq!(source_file("module.cpython-312.pyc"), "module.py");
    assert_eq!(source_file("module.other.cpython-312.pyc"), "module.other.py");
    assert_eq!(source_file("mod.cpython-312.opt-1.PYC"), "mod.py");
    assert!(is_bytecode("mod.cpython-312.opt-1.PYC"));
    assert!(is_bytecode("m.pyo"));
    assert!(!is_bytecode("notes.txt"));
    assert!(!is_bytecode(".pyc"));
    assert_eq!(bytecode_source("/p/pkg/__pycache__/mod.cpython-312.pyc"), Some("/p/pkg/mod.py".to_string()));
    assert_eq!(
        bytecode_source("C:\\p\\pkg\\__pycache__\\module.other.cpython-312.pyc"),
        Some("C:\\p\\pkg\\module.other.py".to_string())
    );
    assert_eq!(bytecode_source("mod.pyc"), None);
    assert_eq!(bytecode_source("__pycache__/mod.pyc"), Some("mod.py".to_string()));
}

#[test]
fn bytecode_cache_rejects_unrelated_files_and_subdirectories() {
    let pyc = |name: &str, is_file: bool, len: u64, source: bool| PycEntry {
        name: name.to_string(),
        is_file,
        len,
        source_is_file: source,
    };
    assert_eq!(backed_bytes(&[pyc("m.cpython-312.pyc", true, 8, true)]), Some(8));
    assert_eq!(backed_bytes(&[pyc("m.cpython-312.pyc", true, 8, true), pyc("notes.txt", true, 4, false)]), None);
    assert_eq!(backed_bytes(&[pyc("m.cpython-312.pyc", true, 8, true), pyc("nested", false, 0, false)]), None);
    assert_eq!(backed_bytes(&[pyc("m.cpython-312.pyc", true, 8, false)]), None);
    assert_eq!(backed_bytes(&[]), None);
    let f = PyCacheDetector.finding("/p/pkg/__pycache__", 8, 4096);
    assert_eq!(f.label, "__pycache__/ (pkg)");
    assert_eq!(f.bytes, 4096);
}

#[test]
fn coverage_configuration_is_not_test_output() {
    assert_eq!(classify(".coverage", false, true, false), Some(PyTestItem::Coverage));
    assert_eq!(classify(".coverage.host.1234.Xab12cdx", false, true, false), Some(PyTestItem::Coverage));
    assert_eq!(classify(".coverage.settings", false, true, false), None);
    assert_eq!(classify(".pytest_cache", true, false, false), Some(PyTestItem::Cache));
    assert_eq!(classify(".hypothesis", true, false, false), Some(PyTestItem::Hypothesis));
    assert_eq!(classify("123456789é.txt", false, true, true), None);
}

#[test]
fn requirements_directory_is_not_a_project_marker() {
    let item = |name: &str, is_file: bool| DirItem { name: name.to_string(), is_file };
    assert!(!has_python_marker(&[item("requirements-dev.txt", false)], false));
    assert!(has_python_marker(&[item("Requirements-Dev.TXT", true)], false));
    assert!(has_python_marker(&[item("pyproject.toml", true)], false));
    assert!(!has_python_marker(&[item("README.md", true)], false));
}

#[test]
fn new_manual_findings_survive_even_a_forced_clean() {
    let d = PyTestCachesDetector;
    let hyp = d.finding(".hypothesis", "/p/.hypothesis", PyTestItem::Hypothesis, false, 15).unwrap();
    let cov = d.finding(".coverage", "/p/.coverage", PyTestItem::Coverage, false, 16).unwrap();
    let cache = d.finding(".pytest_cache", "/p/.pytest_cache", PyTestItem::Cache, false, 2).unwrap();
    assert!(matches!(hyp.action, CleanAction::Manual { .. }));
    assert!(matches!(cov.action, CleanAction::Manual { .. }));
    assert!(matches!(cache.action, CleanAction::RemovePath { .. }));
    assert_eq!(cov.label, ".coverage (p)");
    assert_eq!(cache.label, ".pytest_cache/ (p)");
    assert!(d.finding(".coverage", "/p/.coverage", PyTestItem::Coverage, true, 16).is_none());
    let bin = DotNetDetector.finding("/p", "bin", &sized(10)).unwrap();
    assert!(matches!(bin.action, CleanAction::Manual { .. }));
}

#[test]
fn flags_old_large_entries_only() {
    let e = |p: &str, stale: bool, bytes: u64| TempEntry { path: p.to_string(), is_link: false, stale, bytes };
    let mib = 1024 * 1024;
    let entries = vec![
        e("/t/a", true, 2 * mib),
        e("/t/fresh", false, 9 * mib),
        e("/t/small", true, mib - 1),
        e("/t/b", true, 5 * mib),
        e("/t/c", true, 3 * mib),
        e("/t/d", true, 3 * mib),
        e("/t/e", true, 4 * mib),
        e("/t/f", true, 6 * mib),
    ];
    let out = TempDetector.findings(entries);
    let labels: Vec<&str> = out.iter().map(|f| f.label.as_str()).collect();
    assert_eq!(labels, vec!["stale temp: f", "stale temp: b", "stale temp: e", "stale temp: c", "stale temp: d"]);
    assert!(out.iter().all(|f| f.safety == Safety::Caution));
}

#[test]
fn android_preserves_unknown_component_folders() {
    let a = AndroidDetector;
    for (group, name) in [
        ("ndk", "personal-backup"),
        ("platforms", "notes"),
        ("build-tools", "custom"),
        ("sources", "android-"),
        ("cmake", "3.22.1-backup"),
    ] {
        assert!(a.component_candidate("/sdk", group, name).is_none(), "{group}/{name}");
    }
    let c = a.component_candidate("/sdk", "ndk", "28.2.13676358").unwrap();
    assert_eq!(c.label, "android ndk/28.2.13676358");
    assert_eq!(c.path, "/sdk/ndk/28.2.13676358");
    assert_eq!(c.safety, Safety::Caution);
    assert!(a.component_candidate("/sdk", "platforms", "android-34").is_some());
}

#[test]
fn orphan_requires_redirect_difference_and_free_lock() {
    let ctx = Ctx::for_tests("/h");
    let uv = UvCacheDetector;
    assert_eq!(uv.stale_orphan(&ctx, false, false, true, Some(false)), None);
    assert_eq!(uv.stale_orphan(&ctx, true, false, true, Some(false)), Some("/h/AppData/Local/uv/cache".to_string()));
    assert_eq!(uv.stale_orphan(&ctx, true, true, true, Some(false)), None);
    assert_eq!(uv.stale_orphan(&ctx, true, false, true, Some(true)), None);
    assert_eq!(uv.stale_orphan(&ctx, true, false, true, None), None);
    let live = uv.live_finding(&ctx, Some(55), false).unwrap();
    assert_eq!(live.bytes, 55);
    assert!(matches!(live.action, CleanAction::Manual { .. }));
    assert!(uv.live_finding(&ctx, Some(0), true).is_none());
    assert!(uv.orphan_finding("/h/x", &sized(10)).is_none());
    assert!(uv.orphan_finding("/h/x", &sized(50 * 1024 * 1024)).is_some());
}

#[test]
fn stale_uv_cache_is_reported_never_auto_deleted() {
    let f = UvCacheDetector.orphan_finding("/h/uv/cache", &sized(60_000_000)).unwrap();
    assert_eq!(f.safety, Safety::Caution);
    match f.action {
        CleanAction::Manual { instructions } => {
            assert_eq!(instructions, "Run `uv cache clean --cache-dir \"/h/uv/cache\"` to clear this leftover with uv itself.")
        }
        other => panic!("{other:?}"),
    }
}

#[test]
fn tiny_leftovers_stay_silent() {
    let w = WindowsUpdateDetector;
    let targets = w.targets("/h/Windows");
    assert_eq!(targets.len(), 2);
    assert_eq!(targets[0].path, "/h/Windows/SoftwareDistribution/Download");
    assert_eq!(targets[1].path, "/h/Windows.old");
    assert!(w.finding(&targets[0], Some(1024)).is_none());
    assert!(w.finding(&targets[0], None).is_none());
    let f = w.finding(&targets[1], Some(60 * 1024 * 1024)).unwrap();
    assert_eq!(f.label, "windows previous Windows install");
    assert!(matches!(f.action, CleanAction::Manual { .. }));
}

#[test]
fn reports_vhdx_size() {
    let f = DockerDetector.finding("/h/Docker/docker_data.vhdx", Some(FileMeta { is_file: true, len: 4096 })).unwrap();
    assert_eq!(f.label, "docker data disk (docker_data.vhdx)");
    assert_eq!(f.bytes, 4096);
    assert_eq!(f.safety, Safety::Caution);
    assert!(DockerDetector.finding("/h/x", None).is_none());
    assert!(DockerDetector.finding("/h/x", Some(FileMeta { is_file: true, len: 0 })).is_none());
}

#[test]
fn agent_artifacts_need_ten_mebibytes() {
    let a = AgentArtifactsDetector;
    let ctx = Ctx::for_tests("/h");
    assert_eq!(a.work_dir(&ctx), "/h/.codex/work_artifacts");
    let c = a.task_candidate("/h/.codex/work_artifacts/build-1");
    assert_eq!(c.label, "agent task output (build-1)");
    assert!(a.sized(c, &sized(1024)).is_none());
    let c = a.session_candidate("/h/.codex/sessions/2024/01");
    assert_eq!(c.label, "old agent sessions (01)");
    assert!(a.sized(c, &sized(11 * 1024 * 1024)).is_some());
}

#[test]
fn browser_candidates_cover_profiles_only() {
    let b = BrowserCacheDetector;
    let ctx = Ctx::for_tests("/h");
    let bases = b.bases(&ctx);
    assert_eq!(bases[0], "/h/AppData/Local/Google/Chrome/User Data");
    assert!(b.profile_candidates(&bases[0], "GPUPersistentCache").is_empty());
    let c = b.profile_candidates(&bases[0], "Profile 1");
    assert_eq!(c.len(), 6);
    assert_eq!(c[2].label, "chrome Profile 1/cache");
    assert_eq!(c[0].safety, Safety::Caution);
    let shared = b.base_candidates(&bases[1]);
    assert_eq!(shared[0].label, "edge on-device model");
    assert_eq!(shared[1].label, "edge shadercache");
}

#[test]
fn sandbox_layout_is_under_the_root() {
    let ctx = Ctx::for_tests("/sandbox");
    assert_eq!(ctx.local_app_data, "/sandbox/AppData/Local");
    assert_eq!(ctx.pub_cache, "/sandbox/AppData/Local/Pub/Cache");
    assert_eq!(ctx.android_sdk.as_deref(), Some("/sandbox/AppData/Local/Android/Sdk"));
    assert_eq!(ctx.project_roots, vec!["/sandbox/projects".to_string()]);
    assert_eq!(ctx.go_mod_cache, "/sandbox/go/pkg/mod");
    let managed = ctx.managed_candidates();
    assert_eq!(managed.len(), 17);
    assert_eq!(managed[3], "/sandbox/.codex");
}

fn empty_env() -> EnvSnapshot {
    EnvSnapshot {
        platform_home: Some("/home/u".to_string()),
        platform_local_data: None,
        current_dir: Some("/work".to_string()),
        current_dir_is_dir: true,
        temp_dir: "/tmp".to_string(),
        windows: false,
        macos: false,
        user_profile: None,
        home_var: None,
        local_app_data: None,
        cargo_home: None,
        rustup_home: None,
        pub_cache: None,
        android_sdk_root: None,
        android_home: None,
        default_android_sdk_is_dir: false,
        npm_config_cache: None,
        npm_config_cache_upper: None,
        yarn_cache_folder: None,
        pip_cache_dir: None,
        xdg_cache_home: None,
        uv_cache_dir: None,
        gradle_user_home: None,
        system_root: None,
        go_path: None,
        go_cache: None,
        go_mod_cache: None,
    }
}

#[test]
fn environment_overrides_and_defaults() {
    let ctx = Ctx::from_snapshot(&empty_env());
    assert_eq!(ctx.cargo_home, "/home/u/.cargo");
    assert_eq!(ctx.npm_cache, "/home/u/.npm");
    assert_eq!(ctx.pip_cache, "/home/u/.cache/pip");
    assert_eq!(ctx.system_root, None);
    assert_eq!(ctx.project_roots, vec!["/work".to_string()]);
    let mut env = empty_env();
    env.cargo_home = Some("/opt/cargo".to_string());
    env.gradle_user_home = Some(String::new());
    env.xdg_cache_home = Some("relative".to_string());
    env.windows = true;
    let ctx = Ctx::from_snapshot(&env);
    assert_eq!(ctx.cargo_home, "/opt/cargo");
    assert_eq!(ctx.gradle_home, "/home/u/.gradle");
    assert_eq!(ctx.pip_cache, "/home/u/AppData/Local/pip/Cache");
    assert_eq!(ctx.system_root.as_deref(), Some(r"C:\Windows"));
}

#[test]
fn overlapping_roots_find_each_project_once() {
    let mut set = ProjectSet::new(500);
    assert!(set.add("/p/app".to_string()));
    assert!(!set.add("/p//app/".to_string()));
    assert!(set.add("/p/other".to_string()));
    assert_eq!(set.dirs.len(), 2);
    assert!(!set.is_full());
    assert!(is_manifest("app.csproj", false));
    assert!(!is_manifest("repository.sln", false));
    assert!(is_manifest("App.CsProj", true));
}

#[test]
fn tree_age_is_judged_per_entry() {
    let now: i128 = 1_800_000_000 * 1_000_000_000;
    let cutoff = age_cutoff(now, 7).unwrap();
    assert_eq!(cutoff, now - 7 * NANOS_PER_DAY);
    assert!(entry_is_old(&EntryAge::Modified(cutoff - 1), cutoff));
    assert!(!entry_is_old(&EntryAge::Modified(cutoff), cutoff));
    assert!(!entry_is_old(&EntryAge::Modified(now), cutoff));
    assert!(entry_is_old(&EntryAge::Modified(-5), cutoff));
    assert!(!entry_is_old(&EntryAge::Link, cutoff));
    assert!(!entry_is_old(&EntryAge::Unreadable, cutoff));
    assert_eq!(age_cutoff(i128::MIN + 1, 1), None);
    assert_eq!(age_cutoff(0, 0), Some(0));
}

#[test]
fn update_leftovers_are_sized_only_when_real_directories() {
    assert_eq!(sized_bytes(&sized(60 * 1024 * 1024)), Some(60 * 1024 * 1024));
    assert_eq!(sized_bytes(&sized(0)), None);
    assert_eq!(sized_bytes(&DirProbe { is_dir: true, is_link: true, bytes: 5 }), None);
    assert_eq!(sized_bytes(&DirProbe { is_dir: false, is_link: false, bytes: 5 }), None);
    let det = WindowsUpdateDetector;
    let targets = det.targets("C:/Windows");
    let small = det.finding(&targets[0], sized_bytes(&sized(1024)));
    assert!(small.is_none());
    let big = det.finding(&targets[0], sized_bytes(&sized(60 * 1024 * 1024))).unwrap();
    assert_eq!(big.bytes, 60 * 1024 * 1024);
    assert_eq!(big.label, "windows update downloads");
}

#[test]
fn ranking_keeps_equal_findings_in_report_order() {
    fn path_of(f: &Finding) -> String {
        match &f.action {
            CleanAction::RemovePath { path } => path.clone(),
            _ => String::new(),
        }
    }
    let mut first = found("cargo", "target (app)", 100);
    first.action = CleanAction::RemovePath { path: "/a/app/target".to_string() };
    let mut second = found("cargo", "target (app)", 100);
    second.action = CleanAction::RemovePath { path: "/b/app/target".to_string() };
    let bigger = found("cargo", "registry src", 500);
    let ranked = rank(vec![first.clone(), bigger.clone(), second.clone()]);
    let paths: Vec<String> = ranked.iter().map(path_of).collect();
    assert_eq!(paths, vec!["/x/registry src", "/a/app/target", "/b/app/target"]);
    let swapped = rank(vec![second, first, bigger]);
    let paths: Vec<String> = swapped.iter().map(path_of).collect();
    assert_eq!(paths, vec!["/x/registry src", "/b/app/target", "/a/app/target"]);
}

#[test]
fn pip_preserves_unknown_files_in_the_configured_cache_root() {
    let ctx = Ctx::for_tests("/sandbox");
    let c = sweep_core::detectors::pip_cache::PipCacheDetector.candidates(&ctx);
    let paths: Vec<String> = c.iter().map(|c| c.path.clone()).collect();
    assert_eq!(
        paths,
        vec![
            format!("{}/http", ctx.pip_cache),
            format!("{}/http-v2", ctx.pip_cache),
            format!("{}/wheels", ctx.pip_cache),
        ]
    );
    assert!(c.iter().all(|c| c.safety == Safety::Safe));
}

#[test]
fn custom_named_virtual_environments_are_preserved() {
    assert!(sweep_core::detectors::pycache::walk_enters("pkg", false, false, false));
    assert!(!sweep_core::detectors::pycache::walk_enters("pkg", false, true, false));
    assert!(!sweep_core::detectors::pycache::walk_enters("my-env", false, true, false));
    assert!(!sweep_core::detectors::pytest_caches::walk_enters("my-env", false, true, false));
    assert!(sweep_core::detectors::pytest_caches::walk_enters("my-env", false, false, false));
    assert!(!sweep_core::detectors::pycache::walk_enters("pkg", true, false, false));
    assert!(!sweep_core::detectors::pycache::walk_enters(".venv", false, false, false));
    assert!(!sweep_core::detectors::pycache::walk_enters("Node_Modules", false, false, true));
    assert!(sweep_core::detectors::pycache::walk_enters("Node_Modules", false, false, false));
}

#[test]
fn project_set_stops_at_its_cap() {
    let mut set = ProjectSet::new(2);
    assert!(set.add("/a".to_string()));
    assert!(!set.add("/a/".to_string()));
    assert!(!set.is_full());
    assert!(set.add("/b".to_string()));
    assert!(set.is_full());
    assert_eq!(set.dirs, vec!["/a".to_string(), "/b".to_string()]);
}

#[test]
fn old_temp_directory_with_fresh_descendants_is_preserved() {
    let entries = vec![
        TempEntry { path: "/tmp/fresh".to_string(), is_link: false, stale: false, bytes: 50 * 1024 * 1024 },
        TempEntry { path: "/tmp/old".to_string(), is_link: false, stale: true, bytes: 2 * 1024 * 1024 },
    ];
    let found = TempDetector.findings(entries);
    assert_eq!(found.len(), 1);
    assert_eq!(found[0].bytes, 2 * 1024 * 1024);
    assert_eq!(found[0].safety, Safety::Caution);
}

#[test]
fn temp_findings_need_the_caution_level() {
    let entries = vec![TempEntry { path: "/tmp/old".to_string(), is_link: false, stale: true, bytes: 2 * 1024 * 1024 }];
    let found = TempDetector.findings(entries);
    let probes: Vec<sweep_core::cleaner::PathProbe> = found
        .iter()
        .map(|_| sweep_core::cleaner::PathProbe {
            canonical: Ok("/tmp/old".to_string()),
            ancestors: Ok(()),
            stat: sweep_core::cleaner::StatOutcome::Present { is_dir: true },
        })
        .collect();
    let opts = sweep_core::model::CleanOptions { execute: true, to_trash: false, ..sweep_core::model::CleanOptions::default() };
    let plan = sweep_core::cleaner::plan(&found, &probes, &opts);
    assert_eq!(plan.total_bytes, 0);
}

#[test]
fn dotnet_respects_finding_cap_and_ignores_solution_only_roots() {
    assert!(!is_manifest("repository.sln", false));
    assert!(is_manifest("app.csproj", false));
    assert_eq!(sweep_core::detectors::dotnet::MAX_FINDINGS, 200);
    let mut dirs = ProjectSet::new(sweep_core::detectors::dotnet::MAX_FINDINGS);
    let mut added = 0;
    for i in 0..210 {
        if dirs.is_full() {
            break;
        }
        if dirs.add(format!("/root/project-{i}")) {
            added += 1;
        }
    }
    assert_eq!(added, 200);
    assert_eq!(dirs.dirs.len(), 200);
}

#[test]
fn dotnet_does_not_auto_delete_runtime_data_from_bin() {
    let f = DotNetDetector.finding("/r/app", "bin", &sized(21)).unwrap();
    assert_eq!(f.safety, Safety::Caution);
    assert!(matches!(f.action, CleanAction::Manual { .. }));
    assert!(DotNetDetector.finding("/r/app", "bin", &DirProbe { is_dir: false, is_link: false, bytes: 0 }).is_none());
}

#[test]
fn missing_cache_is_silent() {
    let ctx = Ctx::for_tests("/sandbox");
    let absent = DirProbe { is_dir: false, is_link: false, bytes: 0 };
    for c in sweep_core::detectors::pip_cache::PipCacheDetector.candidates(&ctx) {
        assert!(dir_finding("pip-cache", c, &absent).is_none());
    }
}

#[test]
fn silent_without_leftovers() {
    let det = WindowsUpdateDetector;
    let absent = DirProbe { is_dir: false, is_link: false, bytes: 0 };
    for t in det.targets("C:\\Windows") {
        assert!(det.finding(&t, sized_bytes(&absent)).is_none());
    }
}

#[test]
fn yarn_cleanup_preserves_sibling_configuration_and_binaries() {
    let ctx = Ctx::for_tests("/sandbox");
    let c = sweep_core::detectors::jscaches::JsCachesDetector.candidates(&ctx);
    assert_eq!(c[2].path, ctx.yarn_cache);
    assert!(c[2].path.ends_with("Cache"));
}
